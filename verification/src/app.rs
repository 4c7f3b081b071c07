//! The command runner's decisions: which locale applies, how an error of the
//! API test is classified and reported, and what the diagnostics say.
use vstd::prelude::*;

use crate::config::{AppConfig, TelegramMode};
use crate::i18n::{I18nCatalog, translate_spec, repl_views};
use crate::oci::{CreateInstanceRequest, LaunchStrategy, ResolvedLaunch};
use crate::text::{
    ascii_lower, ascii_lower_char, chars_of, contains, copy_str, decimal_string, occurs_at,
    to_ascii_lowercase, u64_to_string, vec_contains, views,
};

verus! {

/// What kind of failure an error of the API test reports.
#[derive(Debug, Clone, Copy, PartialEq, Eq, Structural)]
pub enum TestApiErrorKind {
    Configuration,
    Discovery,
    Auth,
    AuthUnauthorized,
    AuthForbidden,
    Throttled,
    Capacity,
    Quota,
    Network,
    Unknown,
}

/// The label of a kind, as machine-readable output writes it.
pub open spec fn kind_label(kind: TestApiErrorKind) -> Seq<char> {
    match kind {
        TestApiErrorKind::Configuration => "configuration"@,
        TestApiErrorKind::Discovery => "discovery"@,
        TestApiErrorKind::Auth => "auth"@,
        TestApiErrorKind::AuthUnauthorized => "auth_unauthorized"@,
        TestApiErrorKind::AuthForbidden => "auth_forbidden"@,
        TestApiErrorKind::Throttled => "throttled"@,
        TestApiErrorKind::Capacity => "capacity"@,
        TestApiErrorKind::Quota => "quota"@,
        TestApiErrorKind::Network => "network"@,
        TestApiErrorKind::Unknown => "unknown"@,
    }
}

impl TestApiErrorKind {
    /// The label of this kind.
    pub fn as_str(self) -> (r: &'static str)
        ensures
            r@ == kind_label(self),
    {
        match self {
            TestApiErrorKind::Configuration => "configuration",
            TestApiErrorKind::Discovery => "discovery",
            TestApiErrorKind::Auth => "auth",
            TestApiErrorKind::AuthUnauthorized => "auth_unauthorized",
            TestApiErrorKind::AuthForbidden => "auth_forbidden",
            TestApiErrorKind::Throttled => "throttled",
            TestApiErrorKind::Capacity => "capacity",
            TestApiErrorKind::Quota => "quota",
            TestApiErrorKind::Network => "network",
            TestApiErrorKind::Unknown => "unknown",
        }
    }
}

/// The error text names a configuration problem.
pub open spec fn names_configuration(l: Seq<char>) -> bool {
    ||| contains(l, "failed to read config file"@)
    ||| contains(l, "failed to parse config file"@)
    ||| contains(l, "failed to read oci config file"@)
    ||| contains(l, "oci profile"@)
    ||| contains(l, "missing 'user'"@)
    ||| contains(l, "missing 'fingerprint'"@)
    ||| contains(l, "missing 'tenancy'"@)
    ||| contains(l, "missing 'region'"@)
    ||| contains(l, "missing 'key_file'"@)
}

/// The error text names a resource that discovery did not find.
pub open spec fn names_discovery(l: Seq<char>) -> bool {
    ||| contains(l, "no oci availability domain found"@)
    ||| contains(l, "no available subnet found"@)
    ||| contains(l, "no oracle linux image found"@)
    ||| contains(l, "no free-tier shape candidates configured"@)
    ||| contains(l, "failed to resolve default ssh public key"@)
}

/// The error text reports a refused OCI request.
pub open spec fn names_refused_request(l: Seq<char>) -> bool {
    ||| contains(l, "oci request failed with status"@)
    ||| contains(l, "oci auth test request failed"@)
}

pub open spec fn names_unauthorized(l: Seq<char>) -> bool {
    contains(l, "status 401"@) || contains(l, "notauthenticated"@)
}

pub open spec fn names_forbidden(l: Seq<char>) -> bool {
    contains(l, "status 403"@) || contains(l, "notauthorized"@) || contains(l, "forbidden"@)
}

pub open spec fn names_throttling(l: Seq<char>) -> bool {
    ||| contains(l, "status 429"@)
    ||| contains(l, "toomanyrequests"@)
    ||| contains(l, "rate limit"@)
    ||| contains(l, "throttl"@)
}

pub open spec fn names_capacity(l: Seq<char>) -> bool {
    ||| contains(l, "out of capacity"@)
    ||| contains(l, "capacity"@)
    ||| contains(l, "host capacity"@)
    ||| contains(l, "no capacity"@)
}

pub open spec fn names_quota(l: Seq<char>) -> bool {
    ||| contains(l, "limitexceeded"@)
    ||| contains(l, "quota"@)
    ||| contains(l, "quota exceeded"@)
    ||| contains(l, "exceeded your service limit"@)
}

/// The error text reports that a request could not be sent.
pub open spec fn names_network(l: Seq<char>) -> bool {
    ||| contains(l, "failed to execute oci get request"@)
    ||| contains(l, "failed to execute oci post request"@)
    ||| contains(l, "failed to build oci get url"@)
}

/// The kind of the error with text `details`, read without regard to ASCII
/// case; the first matching group wins, in the order configuration,
/// discovery, refused request (itself refined by status), network.
pub open spec fn classify(details: Seq<char>) -> TestApiErrorKind {
    let l = ascii_lower(details);
    if names_configuration(l) {
        TestApiErrorKind::Configuration
    } else if names_discovery(l) {
        TestApiErrorKind::Discovery
    } else if names_refused_request(l) {
        if names_unauthorized(l) {
            TestApiErrorKind::AuthUnauthorized
        } else if names_forbidden(l) {
            TestApiErrorKind::AuthForbidden
        } else if names_throttling(l) {
            TestApiErrorKind::Throttled
        } else if names_capacity(l) {
            TestApiErrorKind::Capacity
        } else if names_quota(l) {
            TestApiErrorKind::Quota
        } else {
            TestApiErrorKind::Auth
        }
    } else if names_network(l) {
        TestApiErrorKind::Network
    } else {
        TestApiErrorKind::Unknown
    }
}

/// Whether the lower-cased text `l` holds `p`.
fn has(l: &Vec<char>, p: &str) -> (r: bool)
    ensures
        r == contains(l@, p@),
{
    let pv = chars_of(p);
    vec_contains(l, &pv)
}

/// The kind of the error with text `details`.
pub fn classify_error_kind(details: &str) -> (r: TestApiErrorKind)
    ensures
        r == classify(details@),
{
    let l = to_ascii_lowercase(details);
    if has(&l, "failed to read config file") || has(&l, "failed to parse config file") || has(
        &l,
        "failed to read oci config file",
    ) || has(&l, "oci profile") || has(&l, "missing 'user'") || has(&l, "missing 'fingerprint'")
        || has(&l, "missing 'tenancy'") || has(&l, "missing 'region'") || has(
        &l,
        "missing 'key_file'",
    ) {
        return TestApiErrorKind::Configuration;
    }
    if has(&l, "no oci availability domain found") || has(&l, "no available subnet found") || has(
        &l,
        "no oracle linux image found",
    ) || has(&l, "no free-tier shape candidates configured") || has(
        &l,
        "failed to resolve default ssh public key",
    ) {
        return TestApiErrorKind::Discovery;
    }
    if has(&l, "oci request failed with status") || has(&l, "oci auth test request failed") {
        if has(&l, "status 401") || has(&l, "notauthenticated") {
            return TestApiErrorKind::AuthUnauthorized;
        }
        if has(&l, "status 403") || has(&l, "notauthorized") || has(&l, "forbidden") {
            return TestApiErrorKind::AuthForbidden;
        }
        if has(&l, "status 429") || has(&l, "toomanyrequests") || has(&l, "rate limit") || has(
            &l,
            "throttl",
        ) {
            return TestApiErrorKind::Throttled;
        }
        if has(&l, "out of capacity") || has(&l, "capacity") || has(&l, "host capacity") || has(
            &l,
            "no capacity",
        ) {
            return TestApiErrorKind::Capacity;
        }
        if has(&l, "limitexceeded") || has(&l, "quota") || has(&l, "quota exceeded") || has(
            &l,
            "exceeded your service limit",
        ) {
            return TestApiErrorKind::Quota;
        }
        return TestApiErrorKind::Auth;
    }
    if has(&l, "failed to execute oci get request") || has(&l, "failed to execute oci post request")
        || has(&l, "failed to build oci get url") {
        return TestApiErrorKind::Network;
    }
    TestApiErrorKind::Unknown
}

/// Which kind an error text is, read off the words its lower-case form
/// holds: configuration words first, then discovery words; a refused request
/// is unauthorized, forbidden, throttled, out of capacity or over quota by
/// its words, checked in that order, and an auth failure otherwise; then
/// network words; anything else is unknown.
pub proof fn law_classification_by_words(details: Seq<char>)
    ensures
        ({
            let l = ascii_lower(details);
            let k = classify(details);
            &&& (contains(l, "failed to read config file"@) || contains(l, "failed to parse config file"@) || contains(l, "failed to read oci config file"@) || contains(l, "oci profile"@) || contains(l, "missing 'user'"@) || contains(l, "missing 'fingerprint'"@) || contains(l, "missing 'tenancy'"@) || contains(l, "missing 'region'"@) || contains(l, "missing 'key_file'"@)) ==> k == TestApiErrorKind::Configuration
            &&& !(contains(l, "failed to read config file"@) || contains(l, "failed to parse config file"@) || contains(l, "failed to read oci config file"@) || contains(l, "oci profile"@) || contains(l, "missing 'user'"@) || contains(l, "missing 'fingerprint'"@) || contains(l, "missing 'tenancy'"@) || contains(l, "missing 'region'"@) || contains(l, "missing 'key_file'"@)) && (contains(l, "no oci availability domain found"@) || contains(l, "no available subnet found"@) || contains(l, "no oracle linux image found"@) || contains(l, "no free-tier shape candidates configured"@) || contains(l, "failed to resolve default ssh public key"@)) ==> k == TestApiErrorKind::Discovery
            &&& !(contains(l, "failed to read config file"@) || contains(l, "failed to parse config file"@) || contains(l, "failed to read oci config file"@) || contains(l, "oci profile"@) || contains(l, "missing 'user'"@) || contains(l, "missing 'fingerprint'"@) || contains(l, "missing 'tenancy'"@) || contains(l, "missing 'region'"@) || contains(l, "missing 'key_file'"@)) && !(contains(l, "no oci availability domain found"@) || contains(l, "no available subnet found"@) || contains(l, "no oracle linux image found"@) || contains(l, "no free-tier shape candidates configured"@) || contains(l, "failed to resolve default ssh public key"@)) && (contains(l, "oci request failed with status"@) || contains(l, "oci auth test request failed"@)) ==> k == if (contains(l, "status 401"@) || contains(l, "notauthenticated"@)) {
                TestApiErrorKind::AuthUnauthorized
            } else if (contains(l, "status 403"@) || contains(l, "notauthorized"@) || contains(l, "forbidden"@)) {
                TestApiErrorKind::AuthForbidden
            } else if (contains(l, "status 429"@) || contains(l, "toomanyrequests"@) || contains(l, "rate limit"@) || contains(l, "throttl"@)) {
                TestApiErrorKind::Throttled
            } else if (contains(l, "capacity"@)) {
                TestApiErrorKind::Capacity
            } else if (contains(l, "limitexceeded"@) || contains(l, "quota"@) || contains(l, "exceeded your service limit"@)) {
                TestApiErrorKind::Quota
            } else {
                TestApiErrorKind::Auth
            }
            &&& !(contains(l, "failed to read config file"@) || contains(l, "failed to parse config file"@) || contains(l, "failed to read oci config file"@) || contains(l, "oci profile"@) || contains(l, "missing 'user'"@) || contains(l, "missing 'fingerprint'"@) || contains(l, "missing 'tenancy'"@) || contains(l, "missing 'region'"@) || contains(l, "missing 'key_file'"@)) && !(contains(l, "no oci availability domain found"@) || contains(l, "no available subnet found"@) || contains(l, "no oracle linux image found"@) || contains(l, "no free-tier shape candidates configured"@) || contains(l, "failed to resolve default ssh public key"@)) && !(contains(l, "oci request failed with status"@) || contains(l, "oci auth test request failed"@)) && (contains(l, "failed to execute oci get request"@) || contains(l, "failed to execute oci post request"@) || contains(l, "failed to build oci get url"@)) ==> k
                == TestApiErrorKind::Network
            &&& !(contains(l, "failed to read config file"@) || contains(l, "failed to parse config file"@) || contains(l, "failed to read oci config file"@) || contains(l, "oci profile"@) || contains(l, "missing 'user'"@) || contains(l, "missing 'fingerprint'"@) || contains(l, "missing 'tenancy'"@) || contains(l, "missing 'region'"@) || contains(l, "missing 'key_file'"@)) && !(contains(l, "no oci availability domain found"@) || contains(l, "no available subnet found"@) || contains(l, "no oracle linux image found"@) || contains(l, "no free-tier shape candidates configured"@) || contains(l, "failed to resolve default ssh public key"@)) && !(contains(l, "oci request failed with status"@) || contains(l, "oci auth test request failed"@)) && !(contains(l, "failed to execute oci get request"@) || contains(l, "failed to execute oci post request"@) || contains(l, "failed to build oci get url"@)) ==> k
                == TestApiErrorKind::Unknown
        }),
{
    let l = ascii_lower(details);
    reveal_strlit("out of capacity");
    reveal_strlit("host capacity");
    reveal_strlit("no capacity");
    reveal_strlit("capacity");
    reveal_strlit("quota exceeded");
    reveal_strlit("quota");
    if contains(l, "out of capacity"@) {
        assert("out of capacity"@.subrange(7, 15) =~= "capacity"@);
        lemma_contains_part(l, "out of capacity"@, "capacity"@, 7);
    }
    if contains(l, "host capacity"@) {
        assert("host capacity"@.subrange(5, 13) =~= "capacity"@);
        lemma_contains_part(l, "host capacity"@, "capacity"@, 5);
    }
    if contains(l, "no capacity"@) {
        assert("no capacity"@.subrange(3, 11) =~= "capacity"@);
        lemma_contains_part(l, "no capacity"@, "capacity"@, 3);
    }
    if contains(l, "quota exceeded"@) {
        assert("quota exceeded"@.subrange(0, 5) =~= "quota"@);
        lemma_contains_part(l, "quota exceeded"@, "quota"@, 0);
    }
}

/// A text that holds `p` holds every part `q` of `p`.
proof fn lemma_contains_part(l: Seq<char>, p: Seq<char>, q: Seq<char>, o: int)
    requires
        contains(l, p),
        occurs_at(p, q, o),
    ensures
        contains(l, q),
{
    let i = choose|i: int| occurs_at(l, p, i);
    assert(l.subrange(i + o, i + o + q.len()) =~= q) by {
        assert forall|m: int| 0 <= m < q.len() implies l[i + o + m] == q[m] by {
            assert(l.subrange(i, i + p.len())[o + m] == l[i + o + m]);
            assert(p.subrange(o, o + q.len())[m] == p[o + m]);
        }
    }
    assert(occurs_at(l, q, i + o));
}

/// A refused OCI request whose text speaks of capacity is a capacity
/// failure, unless it also names one of the earlier groups (configuration,
/// discovery) or an unauthorized, forbidden or throttled request.
pub proof fn law_refused_capacity_is_capacity(details: Seq<char>)
    requires
        ({
            let l = ascii_lower(details);
            &&& contains(l, "oci request failed with status"@)
            &&& contains(l, "capacity"@)
            &&& !contains(l, "failed to read config file"@)
            &&& !contains(l, "failed to parse config file"@)
            &&& !contains(l, "failed to read oci config file"@)
            &&& !contains(l, "oci profile"@)
            &&& !contains(l, "missing 'user'"@)
            &&& !contains(l, "missing 'fingerprint'"@)
            &&& !contains(l, "missing 'tenancy'"@)
            &&& !contains(l, "missing 'region'"@)
            &&& !contains(l, "missing 'key_file'"@)
            &&& !contains(l, "no oci availability domain found"@)
            &&& !contains(l, "no available subnet found"@)
            &&& !contains(l, "no oracle linux image found"@)
            &&& !contains(l, "no free-tier shape candidates configured"@)
            &&& !contains(l, "failed to resolve default ssh public key"@)
            &&& !contains(l, "status 401"@)
            &&& !contains(l, "notauthenticated"@)
            &&& !contains(l, "status 403"@)
            &&& !contains(l, "notauthorized"@)
            &&& !contains(l, "forbidden"@)
            &&& !contains(l, "status 429"@)
            &&& !contains(l, "toomanyrequests"@)
            &&& !contains(l, "rate limit"@)
            &&& !contains(l, "throttl"@)
        }),
    ensures
        classify(details) == TestApiErrorKind::Capacity,
{
}

/// Classification does not depend on ASCII case: a text and its lower-case
/// form fall in the same kind.
pub proof fn law_classify_ignores_case(details: Seq<char>)
    ensures
        classify(ascii_lower(details)) == classify(details),
{
    assert(ascii_lower(ascii_lower(details)) =~= ascii_lower(details)) by {
        assert forall|i: int| 0 <= i < details.len() implies ascii_lower_char(
            ascii_lower_char(details[i]),
        ) == ascii_lower_char(details[i]) by {
            let c = details[i];
            if 'A' <= c && c <= 'Z' {
                assert((c as u32) + 32 > 'Z' as u32);
            }
        }
    }
}

/// No two kinds share a label.
pub proof fn law_kind_labels_distinct(a: TestApiErrorKind, b: TestApiErrorKind)
    requires
        a != b,
    ensures
        kind_label(a) != kind_label(b),
{
    reveal_strlit("configuration");
    reveal_strlit("discovery");
    reveal_strlit("auth");
    reveal_strlit("auth_unauthorized");
    reveal_strlit("auth_forbidden");
    reveal_strlit("throttled");
    reveal_strlit("capacity");
    reveal_strlit("quota");
    reveal_strlit("network");
    reveal_strlit("unknown");
    let la = kind_label(a);
    let lb = kind_label(b);
    if la == lb {
        assert(la.len() == lb.len());
        assert(la[0] == lb[0]);
        assert(la[la.len() - 1] == lb[lb.len() - 1]);
        assert(la[1] == lb[1]);
        assert(la[5] == lb[5]);
    }
}

// ---------------------------------------------------------------------------
// The runner
// ---------------------------------------------------------------------------

/// The command runner: where the configuration file is and the display
/// language asked for on the command line.
#[derive(Debug, PartialEq, Eq)]
pub struct App {
    pub config_path: String,
    pub cli_lang: Option<String>,
}

impl App {
    pub fn new(config_path: String, cli_lang: Option<String>) -> (r: Self)
        ensures
            r.config_path == config_path,
            r.cli_lang == cli_lang,
    {
        App { config_path, cli_lang }
    }

    /// The display language: the one given on the command line, else the
    /// configured one.
    pub fn effective_locale(&self, config: &AppConfig) -> (r: String)
        ensures
            r@ == match self.cli_lang {
                Some(l) => l@,
                None => config.app.locale@,
            },
    {
        match &self.cli_lang {
            Some(l) => l.clone(),
            None => config.app.locale.clone(),
        }
    }
}

/// The label of a bot mode.
pub open spec fn mode_label(mode: TelegramMode) -> Seq<char> {
    match mode {
        TelegramMode::Polling => "polling"@,
        TelegramMode::Webhook => "webhook"@,
    }
}

/// The label of a launch strategy.
pub open spec fn strategy_label(strategy: LaunchStrategy) -> Seq<char> {
    match strategy {
        LaunchStrategy::ExplicitConfig => "explicit"@,
        LaunchStrategy::FreeTierFallback => "free-tier-fallback"@,
    }
}

pub fn telegram_mode_label(mode: TelegramMode) -> (r: &'static str)
    ensures
        r@ == mode_label(mode),
{
    match mode {
        TelegramMode::Polling => "polling",
        TelegramMode::Webhook => "webhook",
    }
}

pub fn launch_strategy_label(strategy: LaunchStrategy) -> (r: &'static str)
    ensures
        r@ == strategy_label(strategy),
{
    match strategy {
        LaunchStrategy::ExplicitConfig => "explicit",
        LaunchStrategy::FreeTierFallback => "free-tier-fallback",
    }
}

// ---------------------------------------------------------------------------
// API test reports
// ---------------------------------------------------------------------------

/// The catalog key of the message for an error kind.
pub open spec fn error_key(kind: TestApiErrorKind) -> Seq<char> {
    match kind {
        TestApiErrorKind::Configuration => "cli.test_api.error.configuration"@,
        TestApiErrorKind::Discovery => "cli.test_api.error.discovery"@,
        TestApiErrorKind::Auth => "cli.test_api.error.auth"@,
        TestApiErrorKind::AuthUnauthorized => "cli.test_api.error.auth_unauthorized"@,
        TestApiErrorKind::AuthForbidden => "cli.test_api.error.auth_forbidden"@,
        TestApiErrorKind::Throttled => "cli.test_api.error.throttled"@,
        TestApiErrorKind::Capacity => "cli.test_api.error.capacity"@,
        TestApiErrorKind::Quota => "cli.test_api.error.quota"@,
        TestApiErrorKind::Network => "cli.test_api.error.network"@,
        TestApiErrorKind::Unknown => "cli.test_api.error.unknown"@,
    }
}

pub fn test_api_error_key(kind: TestApiErrorKind) -> (r: &'static str)
    ensures
        r@ == error_key(kind),
{
    match kind {
        TestApiErrorKind::Configuration => "cli.test_api.error.configuration",
        TestApiErrorKind::Discovery => "cli.test_api.error.discovery",
        TestApiErrorKind::Auth => "cli.test_api.error.auth",
        TestApiErrorKind::AuthUnauthorized => "cli.test_api.error.auth_unauthorized",
        TestApiErrorKind::AuthForbidden => "cli.test_api.error.auth_forbidden",
        TestApiErrorKind::Throttled => "cli.test_api.error.throttled",
        TestApiErrorKind::Capacity => "cli.test_api.error.capacity",
        TestApiErrorKind::Quota => "cli.test_api.error.quota",
        TestApiErrorKind::Network => "cli.test_api.error.network",
        TestApiErrorKind::Unknown => "cli.test_api.error.unknown",
    }
}

/// The message that reports an API test error with text `details`: the
/// catalog text of its kind, with `{details}` filled in.
pub fn classify_test_api_error(locale: &str, i18n: &I18nCatalog, details: &str) -> (r: String)
    requires
        i18n.wf(),
    ensures
        r@ == translate_spec(
            i18n.tables(),
            i18n.default_locale@,
            locale@,
            error_key(classify(details@)),
            seq![("details"@, details@)],
        ),
{
    let key = test_api_error_key(classify_error_kind(details));
    let repl: [(&str, &str); 1] = [("details", details)];
    let r = i18n.t(locale, key, &repl);
    assert(repl_views(repl@) =~= seq![("details"@, details@)]);
    r
}

/// The launch context that a successful JSON report carries.
#[derive(Debug, PartialEq, Eq)]
pub struct TestApiResolvedLaunch {
    pub strategy: String,
    pub availability_domain: String,
    pub subnet_id: String,
    pub image_id: String,
    pub shape: Option<String>,
    pub ocpus: Option<u32>,
    pub memory_in_gbs: Option<u32>,
}

impl TestApiResolvedLaunch {
    pub fn from_resolved(resolved: &ResolvedLaunch) -> (r: Self)
        ensures
            r.strategy@ == strategy_label(resolved.strategy),
            r.availability_domain == resolved.launch_config.availability_domain,
            r.subnet_id == resolved.launch_config.subnet_id,
            r.image_id == resolved.launch_config.image_id,
            r.shape == resolved.launch_config.shape,
            r.ocpus == resolved.selected_shape_ocpus,
            r.memory_in_gbs == resolved.selected_shape_memory_in_gbs,
    {
        TestApiResolvedLaunch {
            strategy: copy_str(launch_strategy_label(resolved.strategy)),
            availability_domain: resolved.launch_config.availability_domain.clone(),
            subnet_id: resolved.launch_config.subnet_id.clone(),
            image_id: resolved.launch_config.image_id.clone(),
            shape: crate::config::copy_opt(&resolved.launch_config.shape),
            ocpus: resolved.selected_shape_ocpus,
            memory_in_gbs: resolved.selected_shape_memory_in_gbs,
        }
    }
}

/// The machine-readable report of an API test; absent parts are left out of
/// the JSON text.
#[derive(Debug, PartialEq, Eq)]
pub struct TestApiJsonOutput {
    pub status: String,
    pub phase: String,
    pub kind: Option<String>,
    pub region: Option<String>,
    pub resolved_launch: Option<TestApiResolvedLaunch>,
    pub launch_payload: Option<CreateInstanceRequest>,
    pub message: Option<String>,
}

/// `o` reports a failed test: status `error`, the phase, the kind's label
/// and the error text, and nothing else.
pub open spec fn is_failure_report(
    o: TestApiJsonOutput,
    phase: Seq<char>,
    kind: TestApiErrorKind,
    message: Seq<char>,
) -> bool {
    &&& o.status@ == "error"@
    &&& o.phase@ == phase
    &&& o.kind matches Some(k) && k@ == kind_label(kind)
    &&& o.region is None
    &&& o.resolved_launch is None
    &&& o.launch_payload is None
    &&& o.message matches Some(m) && m@ == message
}

impl TestApiJsonOutput {
    /// The report of a test that passed: status `ok`, the phase, the region,
    /// the launch context and, when asked for, the payload.
    pub fn success(
        region: &str,
        phase: &str,
        resolved: &ResolvedLaunch,
        payload: Option<CreateInstanceRequest>,
    ) -> (r: Self)
        ensures
            r.status@ == "ok"@,
            r.phase@ == phase@,
            r.kind is None,
            r.region matches Some(g) && g@ == region@,
            r.resolved_launch matches Some(l) && l.strategy@ == strategy_label(resolved.strategy)
                && l.availability_domain == resolved.launch_config.availability_domain
                && l.subnet_id == resolved.launch_config.subnet_id && l.image_id
                == resolved.launch_config.image_id && l.shape == resolved.launch_config.shape
                && l.ocpus == resolved.selected_shape_ocpus && l.memory_in_gbs
                == resolved.selected_shape_memory_in_gbs,
            r.launch_payload == payload,
            r.message is None,
    {
        TestApiJsonOutput {
            status: copy_str("ok"),
            phase: copy_str(phase),
            kind: None,
            region: Some(copy_str(region)),
            resolved_launch: Some(TestApiResolvedLaunch::from_resolved(resolved)),
            launch_payload: payload,
            message: None,
        }
    }

    /// The report of a test that failed: status `error`, the phase, the
    /// kind's label and the error text.
    pub fn failure(phase: &str, kind: TestApiErrorKind, message: &str) -> (r: Self)
        ensures
            is_failure_report(r, phase@, kind, message@),
    {
        TestApiJsonOutput {
            status: copy_str("error"),
            phase: copy_str(phase),
            kind: Some(copy_str(kind.as_str())),
            region: None,
            resolved_launch: None,
            launch_payload: None,
            message: Some(copy_str(message)),
        }
    }
}

/// How a failed API test is reported.
#[derive(Debug, PartialEq, Eq)]
pub enum TestApiFailure {
    /// Machine-readable output: this report is printed, and the command fails
    /// without a message of its own.
    Json(TestApiJsonOutput),
    /// Text output: the command fails with this message.
    Message(String),
}

/// The report of an API test that failed in `phase` with error text
/// `details`: with `json`, the JSON report of its kind; otherwise the catalog
/// message of its kind with the details filled in.
pub fn test_api_failure(
    locale: &str,
    i18n: &I18nCatalog,
    phase: &str,
    json: bool,
    details: &str,
) -> (r: TestApiFailure)
    requires
        i18n.wf(),
    ensures
        json ==> (r matches TestApiFailure::Json(o) && is_failure_report(
            o,
            phase@,
            classify(details@),
            details@,
        )),
        !json ==> (r matches TestApiFailure::Message(m) && m@ == translate_spec(
            i18n.tables(),
            i18n.default_locale@,
            locale@,
            error_key(classify(details@)),
            seq![("details"@, details@)],
        )),
{
    if json {
        let kind = classify_error_kind(details);
        TestApiFailure::Json(TestApiJsonOutput::failure(phase, kind, details))
    } else {
        TestApiFailure::Message(classify_test_api_error(locale, i18n, details))
    }
}

// ---------------------------------------------------------------------------
// Diagnostics
// ---------------------------------------------------------------------------

/// The catalog text of `key` with one placeholder filled in.
pub open spec fn msg1(
    i18n: I18nCatalog,
    locale: Seq<char>,
    key: Seq<char>,
    name: Seq<char>,
    value: Seq<char>,
) -> Seq<char> {
    translate_spec(i18n.tables(), i18n.default_locale@, locale, key, seq![(name, value)])
}

/// The message of `key` with one placeholder filled in.
fn t1(i18n: &I18nCatalog, locale: &str, key: &str, name: &'static str, value: &str) -> (r: String)
    requires
        i18n.wf(),
    ensures
        r@ == msg1(*i18n, locale@, key@, name@, value@),
{
    let repl: [(&str, &str); 1] = [(name, value)];
    let r = i18n.t(locale, key, &repl);
    assert(repl_views(repl@) =~= seq![(name@, value@)]);
    r
}

/// The lines that describe a resolved launch: strategy, availability
/// domain, subnet and image, then the shape size when both parts are known.
pub fn launch_diagnostics(locale: &str, i18n: &I18nCatalog, resolved: &ResolvedLaunch) -> (r: Vec<
    String,
>)
    requires
        i18n.wf(),
    ensures
        views(r@).take(4) == seq![
            msg1(*i18n, locale@, "cli.launch.strategy"@, "strategy"@, strategy_label(resolved.strategy)),
            msg1(*i18n, locale@, "cli.launch.ad"@, "availability_domain"@, resolved.launch_config.availability_domain@),
            msg1(*i18n, locale@, "cli.launch.subnet"@, "subnet_id"@, resolved.launch_config.subnet_id@),
            msg1(*i18n, locale@, "cli.launch.image"@, "image_id"@, resolved.launch_config.image_id@),
        ],
        match (resolved.selected_shape_ocpus, resolved.selected_shape_memory_in_gbs) {
            (Some(o), Some(m)) => r@.len() == 5 && r@[4]@ == translate_spec(
                i18n.tables(),
                i18n.default_locale@,
                locale@,
                "cli.launch.shape_config"@,
                seq![("ocpus"@, decimal_string(o as nat)), ("memory_in_gbs"@, decimal_string(m as nat))],
            ),
            _ => r@.len() == 4,
        },
{
    let mut lines: Vec<String> = Vec::new();
    lines.push(t1(i18n, locale, "cli.launch.strategy", "strategy", launch_strategy_label(resolved.strategy)));
    lines.push(t1(i18n, locale, "cli.launch.ad", "availability_domain", resolved.launch_config.availability_domain.as_str()));
    lines.push(t1(i18n, locale, "cli.launch.subnet", "subnet_id", resolved.launch_config.subnet_id.as_str()));
    lines.push(t1(i18n, locale, "cli.launch.image", "image_id", resolved.launch_config.image_id.as_str()));
    assert(views(lines@).take(4) =~= views(lines@));
    match (resolved.selected_shape_ocpus, resolved.selected_shape_memory_in_gbs) {
        (Some(o), Some(m)) => {
            let ocpus = u64_to_string(o as u64);
            let memory = u64_to_string(m as u64);
            let repl: [(&str, &str); 2] = [("ocpus", ocpus.as_str()), ("memory_in_gbs", memory.as_str())];
            let line = i18n.t(locale, "cli.launch.shape_config", &repl);
            assert(repl_views(repl@) =~= seq![("ocpus"@, decimal_string(o as nat)), ("memory_in_gbs"@, decimal_string(m as nat))]);
            lines.push(line);
        },
        _ => {},
    }
    lines
}

/// The lines that describe the runtime: log directory, lock file and bot
/// mode; in webhook mode also the URL, listen address and path that are set.
pub open spec fn runtime_summary_spec(i18n: I18nCatalog, locale: Seq<char>, config: AppConfig) -> Seq<
    Seq<char>,
> {
    let base = seq![
        msg1(i18n, locale, "cli.runtime.log_dir"@, "path"@, config.app.log_dir@),
        msg1(i18n, locale, "cli.runtime.lock_file"@, "path"@, config.app.lock_file@),
        msg1(i18n, locale, "cli.runtime.bot_mode"@, "mode"@, mode_label(config.telegram.mode)),
    ];
    if config.telegram.mode == TelegramMode::Webhook {
        let with_url = match config.telegram.webhook_url {
            Some(u) => base.push(msg1(i18n, locale, "cli.runtime.webhook_url"@, "url"@, u@)),
            None => base,
        };
        let with_listen = match config.telegram.webhook_listen {
            Some(a) => with_url.push(
                msg1(i18n, locale, "cli.runtime.webhook_listen"@, "address"@, a@),
            ),
            None => with_url,
        };
        match config.telegram.webhook_path {
            Some(p) => with_listen.push(msg1(i18n, locale, "cli.runtime.webhook_path"@, "path"@, p@)),
            None => with_listen,
        }
    } else {
        base
    }
}

/// The runtime summary.
pub fn runtime_summary(locale: &str, i18n: &I18nCatalog, config: &AppConfig) -> (r: Vec<String>)
    requires
        i18n.wf(),
    ensures
        views(r@) == runtime_summary_spec(*i18n, locale@, *config),
{
    let mut lines: Vec<String> = Vec::new();
    lines.push(t1(i18n, locale, "cli.runtime.log_dir", "path", config.app.log_dir.as_str()));
    lines.push(t1(i18n, locale, "cli.runtime.lock_file", "path", config.app.lock_file.as_str()));
    lines.push(t1(i18n, locale, "cli.runtime.bot_mode", "mode", telegram_mode_label(config.telegram.mode)));
    let ghost base = views(lines@);
    if config.telegram.mode == TelegramMode::Webhook {
        match &config.telegram.webhook_url {
            Some(u) => {
                lines.push(t1(i18n, locale, "cli.runtime.webhook_url", "url", u.as_str()));
            },
            None => {},
        }
        match &config.telegram.webhook_listen {
            Some(a) => {
                lines.push(t1(i18n, locale, "cli.runtime.webhook_listen", "address", a.as_str()));
            },
            None => {},
        }
        match &config.telegram.webhook_path {
            Some(p) => {
                lines.push(t1(i18n, locale, "cli.runtime.webhook_path", "path", p.as_str()));
            },
            None => {},
        }
    }
    assert(views(lines@) =~= runtime_summary_spec(*i18n, locale@, *config));
    lines
}

// ---------------------------------------------------------------------------
// Starting the bot
// ---------------------------------------------------------------------------

/// How the runtime starts the bot.
#[derive(Debug, PartialEq, Eq)]
pub enum BotStart {
    /// No token: the bot stays off.
    Disabled,
    /// Poll for updates.
    Polling,
    /// Serve the webhook at this URL.
    Webhook(String),
}

/// Why the runtime cannot start.
#[derive(Debug, PartialEq, Eq)]
pub enum StartError {
    /// Webhook mode without a webhook URL.
    WebhookUrlMissing,
}

/// The bot start: off without a token, else by the configured mode; webhook
/// mode needs a URL.
pub fn bot_start(config: &AppConfig) -> (r: Result<BotStart, StartError>)
    ensures
        match config.telegram.bot_token {
            None => r == Ok::<BotStart, StartError>(BotStart::Disabled),
            Some(_) => match config.telegram.mode {
                TelegramMode::Polling => r == Ok::<BotStart, StartError>(BotStart::Polling),
                TelegramMode::Webhook => match config.telegram.webhook_url {
                    Some(u) => r == Ok::<BotStart, StartError>(BotStart::Webhook(u)),
                    None => r == Err::<BotStart, StartError>(StartError::WebhookUrlMissing),
                },
            },
        },
{
    match &config.telegram.bot_token {
        None => Ok(BotStart::Disabled),
        Some(_) => match config.telegram.mode {
            TelegramMode::Polling => Ok(BotStart::Polling),
            TelegramMode::Webhook => match &config.telegram.webhook_url {
                Some(u) => Ok(BotStart::Webhook(u.clone())),
                None => Err(StartError::WebhookUrlMissing),
            },
        },
    }
}

} // verus!
