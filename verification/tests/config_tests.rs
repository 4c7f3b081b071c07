use oci_sniper_rs::cli::{BotWebhookArgs, CliError};
use oci_sniper_rs::config::{
    default_shape_candidates, AppConfig, AppSection, FreeTierDefaults, InstanceConfig, LaunchInstanceConfig,
    LaunchMode, OciProfileConfig, ShapeConfig, TelegramConfig, TelegramMode, WebhookChange,
};
use oci_sniper_rs::ini::{CredentialsError, IniError, OciIniConfig};

const TWO_PROFILES: &str = r#"
[DEFAULT]
user = ocid1.user.oc1..example
fingerprint = aa:bb:cc
tenancy = ocid1.tenancy.oc1..example
region = ap-chuncheon-1
key_file = /tmp/key.pem

[ALT]
user = second
fingerprint = dd:ee:ff
tenancy = tenancy
region = ap-seoul-1
key_file = /tmp/alt.pem
"#;

#[test]
fn stores_and_reads_language_preferences() {
    let mut telegram = TelegramConfig::default();
    telegram.set_preferred_locale(42, "zh-TW");

    assert_eq!(telegram.preferred_locale(42, "en"), "zh-TW");
    assert_eq!(telegram.preferred_locale(7, "en"), "en");
}

#[test]
fn parses_oci_ini_profiles() {
    let config = OciIniConfig::parse(TWO_PROFILES).unwrap();
    assert_eq!(config.len(), 2);
    assert_eq!(config.get("DEFAULT").unwrap().region, "ap-chuncheon-1");
    assert_eq!(config.get("ALT").unwrap().key_file, "/tmp/alt.pem");
}

#[test]
fn resolves_requested_profile_from_explicit_path() {
    let text = r#"
[DEFAULT]
user = default-user
fingerprint = aa:bb:cc
tenancy = default-tenancy
region = ap-chuncheon-1
key_file = /tmp/default.pem

[CUSTOM]
user = custom-user
fingerprint = dd:ee:ff
tenancy = custom-tenancy
region = ap-seoul-1
key_file = /tmp/custom.pem
"#;
    let credentials = OciProfileConfig {
        config_file: Some("/tmp/oci-config".to_string()),
        profile: "CUSTOM".to_string(),
    }
    .resolve_credentials(text)
    .unwrap();

    assert_eq!(credentials.user, "custom-user");
    assert_eq!(credentials.region, "ap-seoul-1");
}

#[test]
fn ini_skips_comments_and_keeps_last_value_of_a_key() {
    let text = "# comment\n; another\n[P]\r\nuser=a\nuser = b\nfingerprint=f\ntenancy=t\nregion=r\nkey_file=k\n";
    let config = OciIniConfig::parse(text).unwrap();
    assert_eq!(config.get("P").unwrap().user, "b");
    assert!(config.get("Q").is_none());
}

#[test]
fn ini_keys_before_the_first_section_belong_to_it() {
    let text = "user=u\nfingerprint=f\n[ P ]\ntenancy=t\nregion=r\nkey_file=k";
    let config = OciIniConfig::parse(text).unwrap();
    let p = config.get("P").unwrap();
    assert_eq!(p.user, "u");
    assert_eq!(p.key_file, "k");
}

#[test]
fn ini_repeated_section_replaces_the_profile() {
    let text = "[P]\nuser=a\nfingerprint=f\ntenancy=t\nregion=r\nkey_file=k\n[P]\nuser=b\nfingerprint=f\ntenancy=t\nregion=r\nkey_file=k\n";
    let config = OciIniConfig::parse(text).unwrap();
    assert_eq!(config.len(), 1);
    assert_eq!(config.get("P").unwrap().user, "b");
}

#[test]
fn ini_errors() {
    assert_eq!(
        OciIniConfig::parse("[P]\nnot a pair\n").unwrap_err(),
        IniError::InvalidLine("not a pair".to_string())
    );
    assert_eq!(
        OciIniConfig::parse("[P]\nuser=a\n[Q]\n").unwrap_err(),
        IniError::MissingField { key: "fingerprint".to_string(), section: "P".to_string() }
    );
    assert_eq!(
        OciIniConfig::parse("[P]\nfingerprint=a\n").unwrap_err(),
        IniError::MissingField { key: "user".to_string(), section: "P".to_string() }
    );
    assert_eq!(OciIniConfig::parse("# only\n\n").unwrap_err(), IniError::NoProfiles);
    assert_eq!(
        IniError::MissingField { key: "user".to_string(), section: "P".to_string() }
            .message("/x"),
        "missing 'user' in OCI profile [P]"
    );
    assert_eq!(IniError::NoProfiles.message("/x"), "OCI config file has no profiles: /x");
    assert_eq!(
        IniError::InvalidLine("zz".to_string()).message("/x"),
        "invalid OCI config line: zz"
    );
}

#[test]
fn resolving_an_unknown_profile_names_it() {
    let profile = OciProfileConfig { config_file: None, profile: "NOPE".to_string() };
    let err = profile.resolve_credentials(TWO_PROFILES).unwrap_err();
    assert_eq!(err, CredentialsError::ProfileNotFound("NOPE".to_string()));
    assert_eq!(err.message("/home/u/.oci/config"), "OCI profile 'NOPE' not found in /home/u/.oci/config");
    let err = profile.resolve_credentials("garbage").unwrap_err();
    assert_eq!(err, CredentialsError::Ini(IniError::InvalidLine("garbage".to_string())));
}

#[test]
fn app_section_defaults_include_lock_file() {
    let app = AppSection::default();
    assert_eq!(app.lock_file, ".oci-sniper.lock");
    assert_eq!(app.locale, "en");
    assert_eq!(app.log_dir, "logs");
    assert_eq!(OciProfileConfig::with_defaults().profile, "DEFAULT");
}

#[test]
fn uses_free_tier_defaults_when_launch_config_missing() {
    let instance = InstanceConfig::default();
    match instance.effective_launch_config() {
        LaunchMode::FreeTierFallback(defaults) => {
            assert_eq!(defaults.shape_candidates.len(), 2);
            assert_eq!(defaults.shape_candidates[0].shape, "VM.Standard.A1.Flex");
            assert_eq!(defaults.shape_candidates[1].shape, "VM.Standard.E2.1.Micro");
            assert!(!defaults.assign_public_ip);
        }
        LaunchMode::Explicit(_) => panic!("expected free tier fallback"),
    }
    assert_eq!(default_shape_candidates()[0].ocpus, 4);
    assert_eq!(default_shape_candidates()[0].memory_in_gbs, 24);
}

#[test]
fn loads_app_config_with_explicit_launch_config() {
    let launch = LaunchInstanceConfig {
        availability_domain: "AD-1".to_string(),
        compartment_id: "ocid1.compartment.oc1..example".to_string(),
        subnet_id: "ocid1.subnet.oc1..example".to_string(),
        image_id: "ocid1.image.oc1..example".to_string(),
        display_name: "oci-cct-app-01".to_string(),
        ssh_authorized_keys: "ssh-rsa AAA...".to_string(),
        shape: Some("VM.Standard.A1.Flex".to_string()),
        shape_config: Some(ShapeConfig { ocpus: 4, memory_in_gbs: 24 }),
        boot_volume_size_in_gbs: None,
        boot_volume_vpus_per_gb: None,
        assign_public_ip: true,
        assign_private_dns_record: false,
        assign_ipv6_ip: false,
        ipv6_subnet_cidr: None,
    };
    let mut app = AppSection::default();
    app.locale = "zh-CN".to_string();
    let config = AppConfig {
        app,
        oci: OciProfileConfig {
            config_file: Some("/tmp/oci-config".to_string()),
            profile: "DEFAULT".to_string(),
        },
        instance: InstanceConfig {
            launch: Some(launch.clone()),
            free_tier_defaults: FreeTierDefaults::default(),
        },
        telegram: TelegramConfig::default(),
    };
    assert_eq!(config.app.locale, "zh-CN");
    assert_eq!(config.instance.effective_launch_config(), LaunchMode::Explicit(launch));
}

#[test]
fn bot_webhook_clear_switches_back_to_polling() {
    let mut telegram = TelegramConfig::default();
    telegram.mode = TelegramMode::Webhook;
    telegram.webhook_url = Some("https://example.com/hook".to_string());
    let change = BotWebhookArgs { set: None, clear: true }.change().unwrap();
    telegram.apply_webhook_change(&change);
    assert_eq!(telegram.mode, TelegramMode::Polling);
    assert!(telegram.webhook_url.is_none());
}

#[test]
fn bot_webhook_set_switches_to_webhook() {
    let mut telegram = TelegramConfig::default();
    telegram.set_preferred_locale(1, "en");
    let change = BotWebhookArgs { set: Some("https://x.example/w".to_string()), clear: false }
        .change()
        .unwrap();
    assert_eq!(change, WebhookChange::SetUrl("https://x.example/w".to_string()));
    telegram.apply_webhook_change(&change);
    assert_eq!(telegram.mode, TelegramMode::Webhook);
    assert_eq!(telegram.webhook_url.as_deref(), Some("https://x.example/w"));
    assert_eq!(telegram.preferred_locale(1, "zh-CN"), "en");
    assert_eq!(
        BotWebhookArgs { set: None, clear: false }.change().unwrap_err(),
        CliError::WebhookChoice
    );
    assert_eq!(
        BotWebhookArgs { set: Some("u".to_string()), clear: true }.change().unwrap_err(),
        CliError::WebhookChoice
    );
    assert_eq!(
        CliError::WebhookChoice.message(),
        "either --set <URL> or --clear must be specified"
    );
}

#[test]
fn last_webhook_change_wins() {
    let mut once = TelegramConfig::default();
    once.bot_token = Some("t".to_string());
    once.set_preferred_locale(5, "zh-TW");
    let mut twice = TelegramConfig::default();
    twice.bot_token = Some("t".to_string());
    twice.set_preferred_locale(5, "zh-TW");
    twice.apply_webhook_change(&WebhookChange::SetUrl("https://a.example/h".to_string()));
    twice.apply_webhook_change(&WebhookChange::Clear);
    once.apply_webhook_change(&WebhookChange::Clear);
    assert_eq!(once, twice);
    assert_eq!(twice.mode, TelegramMode::Polling);
    assert_eq!(twice.bot_token.as_deref(), Some("t"));
    assert_eq!(twice.preferred_locale(5, "en"), "zh-TW");
}
