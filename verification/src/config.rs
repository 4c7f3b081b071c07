//! The application configuration: its sections, their defaults, the
//! per-chat language preferences and the choice between an explicit launch
//! template and the free-tier fallback.
use std::collections::HashMap;

use vstd::prelude::*;

use crate::text::copy_str;

verus! {

broadcast use vstd::std_specs::hash::group_hash_axioms;

/// The whole configuration file.
#[derive(Debug, PartialEq, Eq)]
pub struct AppConfig {
    pub app: AppSection,
    pub oci: OciProfileConfig,
    pub instance: InstanceConfig,
    pub telegram: TelegramConfig,
}

/// The `[app]` section: display language, log directory and lock file.
#[derive(Debug, PartialEq, Eq)]
pub struct AppSection {
    pub locale: String,
    pub log_dir: String,
    pub lock_file: String,
}

/// The `[oci]` section: where the OCI credentials file is and which profile
/// of it to use.
#[derive(Debug, PartialEq, Eq)]
pub struct OciProfileConfig {
    pub config_file: Option<String>,
    pub profile: String,
}

/// One profile of an OCI credentials file.
#[derive(Debug, PartialEq, Eq)]
pub struct OciCredentials {
    pub user: String,
    pub fingerprint: String,
    pub tenancy: String,
    pub region: String,
    pub key_file: String,
}

/// The `[telegram]` section.
#[derive(Debug, PartialEq, Eq)]
pub struct TelegramConfig {
    pub bot_token: Option<String>,
    pub mode: TelegramMode,
    pub webhook_url: Option<String>,
    pub webhook_listen: Option<String>,
    pub webhook_path: Option<String>,
    pub language_preferences: HashMap<i64, String>,
}

/// How the bot receives updates.
#[derive(Debug, Clone, Copy, PartialEq, Eq, Structural)]
pub enum TelegramMode {
    Polling,
    Webhook,
}

/// The `[instance]` section.
#[derive(Debug, PartialEq, Eq)]
pub struct InstanceConfig {
    pub launch: Option<LaunchInstanceConfig>,
    pub free_tier_defaults: FreeTierDefaults,
}

/// Which launch template applies.
#[derive(Debug, PartialEq, Eq)]
pub enum LaunchMode {
    Explicit(LaunchInstanceConfig),
    FreeTierFallback(FreeTierDefaults),
}

/// What the free-tier fallback may use, candidate shapes first to last.
#[derive(Debug, PartialEq, Eq)]
pub struct FreeTierDefaults {
    pub shape_candidates: Vec<DefaultShapeCandidate>,
    pub assign_public_ip: bool,
}

/// A shape that the free-tier fallback may ask for.
#[derive(Debug, PartialEq, Eq)]
pub struct DefaultShapeCandidate {
    pub shape: String,
    pub ocpus: u32,
    pub memory_in_gbs: u32,
}

/// An explicit instance launch template.
#[derive(Debug, PartialEq, Eq)]
pub struct LaunchInstanceConfig {
    pub availability_domain: String,
    pub compartment_id: String,
    pub subnet_id: String,
    pub image_id: String,
    pub display_name: String,
    pub ssh_authorized_keys: String,
    pub shape: Option<String>,
    pub shape_config: Option<ShapeConfig>,
    pub boot_volume_size_in_gbs: Option<u32>,
    pub boot_volume_vpus_per_gb: Option<u32>,
    pub assign_public_ip: bool,
    pub assign_private_dns_record: bool,
    pub assign_ipv6_ip: bool,
    pub ipv6_subnet_cidr: Option<String>,
}

/// CPU and memory of a flexible shape.
#[derive(Debug, Clone, Copy, PartialEq, Eq)]
pub struct ShapeConfig {
    pub ocpus: u32,
    pub memory_in_gbs: u32,
}

// ---------------------------------------------------------------------------
// Copies
// ---------------------------------------------------------------------------

/// A copy of an optional string.
pub fn copy_opt(s: &Option<String>) -> (r: Option<String>)
    ensures
        r == *s,
{
    match s {
        Some(v) => Some(v.clone()),
        None => None,
    }
}

impl Clone for OciCredentials {
    fn clone(&self) -> (r: Self)
        ensures
            r == *self,
    {
        OciCredentials {
            user: self.user.clone(),
            fingerprint: self.fingerprint.clone(),
            tenancy: self.tenancy.clone(),
            region: self.region.clone(),
            key_file: self.key_file.clone(),
        }
    }
}

impl Clone for DefaultShapeCandidate {
    fn clone(&self) -> (r: Self)
        ensures
            r == *self,
    {
        DefaultShapeCandidate {
            shape: self.shape.clone(),
            ocpus: self.ocpus,
            memory_in_gbs: self.memory_in_gbs,
        }
    }
}

/// Two free-tier settings hold the same candidates and the same address
/// choice.
pub open spec fn same_defaults(a: FreeTierDefaults, b: FreeTierDefaults) -> bool {
    a.shape_candidates@ == b.shape_candidates@ && a.assign_public_ip == b.assign_public_ip
}

impl Clone for FreeTierDefaults {
    fn clone(&self) -> (r: Self)
        ensures
            same_defaults(r, *self),
    {
        let shape_candidates = self.shape_candidates.clone();
        assert(shape_candidates@ =~= self.shape_candidates@);
        FreeTierDefaults { shape_candidates, assign_public_ip: self.assign_public_ip }
    }
}

impl Clone for LaunchInstanceConfig {
    fn clone(&self) -> (r: Self)
        ensures
            r == *self,
    {
        LaunchInstanceConfig {
            availability_domain: self.availability_domain.clone(),
            compartment_id: self.compartment_id.clone(),
            subnet_id: self.subnet_id.clone(),
            image_id: self.image_id.clone(),
            display_name: self.display_name.clone(),
            ssh_authorized_keys: self.ssh_authorized_keys.clone(),
            shape: copy_opt(&self.shape),
            shape_config: self.shape_config,
            boot_volume_size_in_gbs: self.boot_volume_size_in_gbs,
            boot_volume_vpus_per_gb: self.boot_volume_vpus_per_gb,
            assign_public_ip: self.assign_public_ip,
            assign_private_dns_record: self.assign_private_dns_record,
            assign_ipv6_ip: self.assign_ipv6_ip,
            ipv6_subnet_cidr: copy_opt(&self.ipv6_subnet_cidr),
        }
    }
}

// ---------------------------------------------------------------------------
// Defaults
// ---------------------------------------------------------------------------

/// The display language when none is configured: `"en"`.
pub fn default_locale() -> (r: String)
    ensures
        r@ == "en"@,
{
    copy_str("en")
}

/// The log directory when none is configured: `"logs"`.
pub fn default_log_dir() -> (r: String)
    ensures
        r@ == "logs"@,
{
    copy_str("logs")
}

/// The runtime lock file when none is configured: `".oci-sniper.lock"`.
pub fn default_lock_file() -> (r: String)
    ensures
        r@ == ".oci-sniper.lock"@,
{
    copy_str(".oci-sniper.lock")
}

/// The OCI profile when none is configured: `"DEFAULT"`.
pub fn default_oci_profile() -> (r: String)
    ensures
        r@ == "DEFAULT"@,
{
    copy_str("DEFAULT")
}

/// The first free-tier candidate: an Ampere A1 flexible shape, 4 OCPUs, 24 GB.
pub open spec fn is_a1_flex_candidate(c: DefaultShapeCandidate) -> bool {
    c.shape@ == "VM.Standard.A1.Flex"@ && c.ocpus == 4 && c.memory_in_gbs == 24
}

/// The second free-tier candidate: the AMD E2 micro shape, 1 OCPU, 1 GB.
pub open spec fn is_e2_micro_candidate(c: DefaultShapeCandidate) -> bool {
    c.shape@ == "VM.Standard.E2.1.Micro"@ && c.ocpus == 1 && c.memory_in_gbs == 1
}

/// The free-tier shapes, most wanted first: A1 flex, then E2 micro.
pub fn default_shape_candidates() -> (r: Vec<DefaultShapeCandidate>)
    ensures
        r@.len() == 2,
        is_a1_flex_candidate(r@[0]),
        is_e2_micro_candidate(r@[1]),
{
    let mut r: Vec<DefaultShapeCandidate> = Vec::new();
    r.push(
        DefaultShapeCandidate {
            shape: copy_str("VM.Standard.A1.Flex"),
            ocpus: 4,
            memory_in_gbs: 24,
        },
    );
    r.push(
        DefaultShapeCandidate {
            shape: copy_str("VM.Standard.E2.1.Micro"),
            ocpus: 1,
            memory_in_gbs: 1,
        },
    );
    r
}

impl Default for AppSection {
    fn default() -> (r: Self)
        ensures
            r.locale@ == "en"@,
            r.log_dir@ == "logs"@,
            r.lock_file@ == ".oci-sniper.lock"@,
    {
        AppSection {
            locale: default_locale(),
            log_dir: default_log_dir(),
            lock_file: default_lock_file(),
        }
    }
}

impl Default for FreeTierDefaults {
    fn default() -> (r: Self)
        ensures
            r.shape_candidates@.len() == 2,
            is_a1_flex_candidate(r.shape_candidates@[0]),
            is_e2_micro_candidate(r.shape_candidates@[1]),
            !r.assign_public_ip,
    {
        FreeTierDefaults { shape_candidates: default_shape_candidates(), assign_public_ip: false }
    }
}

impl Default for InstanceConfig {
    fn default() -> (r: Self)
        ensures
            r.launch is None,
            r.free_tier_defaults.shape_candidates@.len() == 2,
            is_a1_flex_candidate(r.free_tier_defaults.shape_candidates@[0]),
            is_e2_micro_candidate(r.free_tier_defaults.shape_candidates@[1]),
            !r.free_tier_defaults.assign_public_ip,
    {
        InstanceConfig { launch: None, free_tier_defaults: FreeTierDefaults::default() }
    }
}

impl Default for TelegramMode {
    fn default() -> (r: Self)
        ensures
            r == TelegramMode::Polling,
    {
        TelegramMode::Polling
    }
}

impl Default for TelegramConfig {
    fn default() -> (r: Self)
        ensures
            r.bot_token is None,
            r.mode == TelegramMode::Polling,
            r.webhook_url is None,
            r.webhook_listen is None,
            r.webhook_path is None,
            r.language_preferences@ == Map::<i64, String>::empty(),
    {
        TelegramConfig {
            bot_token: None,
            mode: TelegramMode::Polling,
            webhook_url: None,
            webhook_listen: None,
            webhook_path: None,
            language_preferences: HashMap::new(),
        }
    }
}

impl OciProfileConfig {
    /// The `[oci]` section when only its required parts are given: no
    /// explicit file, the `"DEFAULT"` profile.
    pub fn with_defaults() -> (r: Self)
        ensures
            r.config_file is None,
            r.profile@ == "DEFAULT"@,
    {
        OciProfileConfig { config_file: None, profile: default_oci_profile() }
    }
}

// ---------------------------------------------------------------------------
// Language preferences
// ---------------------------------------------------------------------------

/// The locale that chat `chat_id` sees: its stored preference, else
/// `fallback`.
pub open spec fn preferred_locale_spec(
    prefs: Map<i64, String>,
    chat_id: i64,
    fallback: Seq<char>,
) -> Seq<char> {
    if prefs.contains_key(chat_id) {
        prefs[chat_id]@
    } else {
        fallback
    }
}

impl TelegramConfig {
    /// The locale stored for `chat_id`, or `fallback` when there is none.
    pub fn preferred_locale(&self, chat_id: i64, fallback: &str) -> (r: String)
        ensures
            r@ == preferred_locale_spec(self.language_preferences@, chat_id, fallback@),
    {
        match self.language_preferences.get(&chat_id) {
            Some(locale) => locale.clone(),
            None => copy_str(fallback),
        }
    }

    /// Stores `locale` as the preference of `chat_id`, replacing an earlier
    /// one; the other chats keep theirs.
    pub fn set_preferred_locale(&mut self, chat_id: i64, locale: &str)
        ensures
            final(self).language_preferences@.contains_key(chat_id),
            final(self).language_preferences@[chat_id]@ == locale@,
            forall|other: i64|
                other != chat_id ==> (#[trigger] final(self).language_preferences@.contains_key(
                    other,
                ) == old(self).language_preferences@.contains_key(other))
                    && final(self).language_preferences@[other] == old(
                    self,
                ).language_preferences@[other],
            final(self).bot_token == old(self).bot_token,
            final(self).mode == old(self).mode,
            final(self).webhook_url == old(self).webhook_url,
            final(self).webhook_listen == old(self).webhook_listen,
            final(self).webhook_path == old(self).webhook_path,
    {
        self.language_preferences.insert(chat_id, copy_str(locale));
    }
}

/// A chat with a stored preference reads that locale; a chat without one
/// reads the fallback it is given, whatever the fallback is.
pub proof fn law_preference_or_fallback(prefs: Map<i64, String>, chat_id: i64, fallback: Seq<char>)
    ensures
        prefs.contains_key(chat_id) ==> preferred_locale_spec(prefs, chat_id, fallback)
            == prefs[chat_id]@,
        !prefs.contains_key(chat_id) ==> preferred_locale_spec(prefs, chat_id, fallback)
            == fallback,
{
}

/// Reading a chat's locale gives back what was last stored for it, and
/// storing a locale for one chat leaves what every other chat reads as it
/// was.
pub proof fn law_preference_read_after_write(
    before: Map<i64, String>,
    after: Map<i64, String>,
    chat_id: i64,
    locale: Seq<char>,
    other: i64,
    fallback: Seq<char>,
)
    requires
        after.contains_key(chat_id),
        after[chat_id]@ == locale,
        forall|o: i64|
            o != chat_id ==> (#[trigger] after.contains_key(o) == before.contains_key(o))
                && after[o] == before[o],
    ensures
        preferred_locale_spec(after, chat_id, fallback) == locale,
        other != chat_id ==> preferred_locale_spec(after, other, fallback)
            == preferred_locale_spec(before, other, fallback),
{
    if other != chat_id {
        assert(after.contains_key(other) == before.contains_key(other));
    }
}

// ---------------------------------------------------------------------------
// Launch mode
// ---------------------------------------------------------------------------

impl InstanceConfig {
    /// The explicit template when one is configured, else the free-tier
    /// fallback with its defaults.
    pub fn effective_launch_config(&self) -> (r: LaunchMode)
        ensures
            match self.launch {
                Some(config) => r == LaunchMode::Explicit(config),
                None => match r {
                    LaunchMode::FreeTierFallback(d) => same_defaults(d, self.free_tier_defaults),
                    LaunchMode::Explicit(_) => false,
                },
            },
    {
        match &self.launch {
            Some(config) => LaunchMode::Explicit(config.clone()),
            None => LaunchMode::FreeTierFallback(self.free_tier_defaults.clone()),
        }
    }
}

// ---------------------------------------------------------------------------
// Webhook settings
// ---------------------------------------------------------------------------

/// What `bot-webhook` asks for.
#[derive(Debug, PartialEq, Eq)]
pub enum WebhookChange {
    SetUrl(String),
    Clear,
}

/// The `[telegram]` section after `change`: webhook mode at the new URL, or
/// polling without a URL; every other setting as it was.
pub open spec fn webhook_applied(t: TelegramConfig, change: WebhookChange) -> TelegramConfig {
    let (mode, url) = match change {
        WebhookChange::SetUrl(u) => (TelegramMode::Webhook, Some(u)),
        WebhookChange::Clear => (TelegramMode::Polling, None::<String>),
    };
    TelegramConfig {
        bot_token: t.bot_token,
        mode,
        webhook_url: url,
        webhook_listen: t.webhook_listen,
        webhook_path: t.webhook_path,
        language_preferences: t.language_preferences,
    }
}

impl TelegramConfig {
    /// Switches to webhook mode at `url`, or back to polling without a
    /// webhook URL; the token, the listen address and path and the language
    /// preferences stay as they were.
    pub fn apply_webhook_change(&mut self, change: &WebhookChange)
        ensures
            *final(self) == webhook_applied(*old(self), *change),
    {
        match change {
            WebhookChange::SetUrl(url) => {
                self.mode = TelegramMode::Webhook;
                self.webhook_url = Some(url.clone());
            },
            WebhookChange::Clear => {
                self.mode = TelegramMode::Polling;
                self.webhook_url = None;
            },
        }
    }
}

/// Setting a webhook URL switches to webhook mode at that URL; clearing
/// switches to polling without a URL; neither touches the token, the listen
/// address and path, or the language preferences.
pub proof fn law_webhook_change_effects(t: TelegramConfig, change: WebhookChange)
    ensures
        ({
            let after = webhook_applied(t, change);
            &&& (change matches WebhookChange::SetUrl(u) ==> after.mode == TelegramMode::Webhook
                && after.webhook_url == Some(u))
            &&& (change is Clear ==> after.mode == TelegramMode::Polling
                && after.webhook_url is None)
            &&& after.bot_token == t.bot_token
            &&& after.webhook_listen == t.webhook_listen
            &&& after.webhook_path == t.webhook_path
            &&& after.language_preferences == t.language_preferences
        }),
{
}

/// Webhook changes do not pile up: after two changes the section is what the
/// second one alone makes of it, so `--clear` after `--set` is back to
/// polling with the rest of the section untouched.
pub proof fn law_last_webhook_change_wins(
    t: TelegramConfig,
    first: WebhookChange,
    second: WebhookChange,
)
    ensures
        webhook_applied(webhook_applied(t, first), second) == webhook_applied(t, second),
{
}

} // verus!
